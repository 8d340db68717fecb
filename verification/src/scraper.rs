//! The content of a fetched page.

use crate::text::{
    char_lists, chars_of, is_blank, join_chars, joined, split_words, squeezed, string_of,
    trim_bounds, trimmed,
};
use crate::summary::texts;
use vstd::prelude::*;
use vstd::string::*;
use vstd::utf8::*;

verus! {

#[verifier::external_type_specification]
#[verifier::external_body]
pub struct ExHtml(::scraper::Html);

/// The page that the `scraper` crate reads from a text of HTML as a document.
pub uninterp spec fn document_of(html: Seq<char>) -> ::scraper::Html;

/// The page that the `scraper` crate reads from a text of HTML as a fragment.
pub uninterp spec fn fragment_of(html: Seq<char>) -> ::scraper::Html;

/// For each element of the page that the CSS selector picks, in the order
/// of the page, the texts of its text nodes; nothing where the selector is
/// not valid.
pub uninterp spec fn picked_texts(page: ::scraper::Html, selector: Seq<char>) -> Option<
    Seq<Seq<Seq<char>>>,
>;

/// The HTML of the first element of the page that the CSS selector picks;
/// nothing where it picks none or is not valid.
pub uninterp spec fn first_picked_html(page: ::scraper::Html, selector: Seq<char>) -> Option<
    Seq<char>,
>;

/// `Html::parse_document` of the `scraper` crate.
#[verifier::external_body]
fn parse_document(html: &str) -> (page: ::scraper::Html)
    ensures
        page == document_of(html@),
{
    ::scraper::Html::parse_document(html)
}

/// `Html::parse_fragment` of the `scraper` crate.
#[verifier::external_body]
fn parse_fragment(html: &str) -> (page: ::scraper::Html)
    ensures
        page == fragment_of(html@),
{
    ::scraper::Html::parse_fragment(html)
}

/// `Html::select` of the `scraper` crate with the selector that
/// `Selector::parse` reads, each element handed out as the texts that
/// `ElementRef::text` walks through.
#[verifier::external_body]
fn select_texts(page: &::scraper::Html, selector: &str) -> (r: Option<Vec<Vec<String>>>)
    ensures
        node_texts(r) == picked_texts(*page, selector@),
{
    let picker = ::scraper::Selector::parse(selector).ok()?;
    Some(page.select(&picker).map(|e| e.text().map(String::from).collect()).collect())
}

/// `Html::select` of the `scraper` crate with the selector that
/// `Selector::parse` reads: the first element, as `ElementRef::html` writes it.
#[verifier::external_body]
fn select_first_html(page: &::scraper::Html, selector: &str) -> (r: Option<String>)
    ensures
        crate::config::text_of(r) == first_picked_html(*page, selector@),
{
    let picker = ::scraper::Selector::parse(selector).ok()?;
    page.select(&picker).next().map(|e| e.html())
}

/// The texts of the text nodes of a list of elements.
pub open spec fn element_texts(elements: Seq<Vec<String>>) -> Seq<Seq<Seq<char>>> {
    elements.map_values(|nodes: Vec<String>| texts(nodes@))
}

/// The texts of the text nodes of the elements that were picked.
pub open spec fn node_texts(picked: Option<Vec<Vec<String>>>) -> Option<Seq<Seq<Seq<char>>>> {
    match picked {
        Some(elements) => Some(element_texts(elements@)),
        None => None,
    }
}

/// The selector of the elements whose text is taken: paragraphs, headings and list items.
pub const CONTENT_SELECTOR: &'static str = "p, h1, h2, h3, h4, h5, h6, li";

/// The heading that the first of the elements gives: its text, trimmed,
/// unless that is blank.
pub open spec fn heading_of(picked: Option<Seq<Seq<Seq<char>>>>) -> Option<Seq<char>> {
    match picked {
        Some(elements) => if elements.len() > 0 && !is_blank(joined(elements[0], Seq::empty())) {
            Some(trimmed(joined(elements[0], Seq::empty())))
        } else {
            None
        },
        None => None,
    }
}

/// The title of a page: that of its `title` element, or else of its first `h1`.
pub open spec fn title_of(page: ::scraper::Html) -> Option<Seq<char>> {
    match heading_of(picked_texts(page, "title"@)) {
        Some(t) => Some(t),
        None => heading_of(picked_texts(page, "h1"@)),
    }
}

/// The paragraph that an element gives: the texts of its text nodes joined
/// with spaces, every run of white space made one space.
pub open spec fn paragraph_of(nodes: Seq<Seq<char>>) -> Seq<char> {
    squeezed(joined(nodes, seq![' ']))
}

/// Whether a paragraph is long enough to be kept: more than 20 bytes of UTF-8.
pub open spec fn is_kept(paragraph: Seq<char>) -> bool {
    encode_utf8(paragraph).len() > 20
}

/// The paragraphs of the elements that are long enough to be kept.
pub open spec fn kept_paragraphs(elements: Seq<Seq<Seq<char>>>) -> Seq<Seq<char>>
    decreases elements.len(),
{
    if elements.len() == 0 {
        Seq::empty()
    } else if is_kept(paragraph_of(elements.last())) {
        kept_paragraphs(elements.drop_last()).push(paragraph_of(elements.last()))
    } else {
        kept_paragraphs(elements.drop_last())
    }
}

/// The text of the elements: their kept paragraphs with an empty line between each two.
pub open spec fn text_of_elements(elements: Seq<Seq<Seq<char>>>) -> Seq<char> {
    joined(kept_paragraphs(elements), seq!['\n', '\n'])
}

/// The readable text of a page: that of its paragraphs, headings and list items.
pub open spec fn text_of_page(page: ::scraper::Html) -> Seq<char> {
    match picked_texts(page, CONTENT_SELECTOR@) {
        Some(elements) => text_of_elements(elements),
        None => Seq::empty(),
    }
}

/// The text of the first element that the selector picks, read as a page
/// of its own, unless there is none or the text is blank.
pub open spec fn main_text(page: ::scraper::Html, selector: Seq<char>) -> Option<Seq<char>> {
    match first_picked_html(page, selector) {
        Some(html) => if is_blank(text_of_page(fragment_of(html))) {
            None
        } else {
            Some(text_of_page(fragment_of(html)))
        },
        None => None,
    }
}

/// The first of two that is there.
pub open spec fn or_else(first: Option<Seq<char>>, second: Option<Seq<char>>) -> Option<Seq<char>> {
    match first {
        Some(t) => Some(t),
        None => second,
    }
}

/// The text of the main part of a page: of the first of `article`, `main`,
/// `[role='main']`, `.content` and `#content` that has text, or else of the
/// whole page.
pub open spec fn content_of_page(page: ::scraper::Html) -> Seq<char> {
    match or_else(
        main_text(page, "article"@),
        or_else(
            main_text(page, "main"@),
            or_else(
                main_text(page, "[role='main']"@),
                or_else(main_text(page, ".content"@), main_text(page, "#content"@)),
            ),
        ),
    ) {
        Some(t) => t,
        None => text_of_page(page),
    }
}

fn concat_nodes(nodes: &Vec<String>, sep: &Vec<char>) -> (out: Vec<char>)
    ensures
        out@ == joined(texts(nodes@), sep@),
{
    let mut lists: Vec<Vec<char>> = Vec::new();
    let mut i: usize = 0;
    while i < nodes.len()
        invariant
            i <= nodes@.len(),
            char_lists(lists@) == texts(nodes@).take(i as int),
        decreases nodes@.len() - i,
    {
        let chars = chars_of(nodes[i].as_str());
        proof {
            assert(texts(nodes@).take(i + 1) =~= texts(nodes@).take(i as int).push(
                nodes@[i as int]@,
            ));
            assert(char_lists(lists@.push(chars)) =~= char_lists(lists@).push(chars@));
        }
        lists.push(chars);
        i = i + 1;
    }
    proof {
        assert(texts(nodes@).take(nodes@.len() as int) =~= texts(nodes@));
    }
    join_chars(&lists, sep)
}

fn heading(picked: &Option<Vec<Vec<String>>>) -> (r: Option<String>)
    ensures
        crate::config::text_of(r) == heading_of(node_texts(*picked)),
{
    match picked {
        Some(elements) => {
            if elements.len() == 0 {
                return None;
            }
            let none: Vec<char> = Vec::new();
            let whole = concat_nodes(&elements[0], &none);
            assert(none@ =~= Seq::<char>::empty());
            let (start, end) = trim_bounds(&whole);
            if start == end {
                return None;
            }
            let mut kept: Vec<char> = Vec::new();
            let mut i = start;
            while i < end
                invariant
                    start <= i <= end <= whole@.len(),
                    kept@ == whole@.subrange(start as int, i as int),
                decreases end - i,
            {
                kept.push(whole[i]);
                assert(kept@ =~= whole@.subrange(start as int, i + 1));
                i = i + 1;
            }
            Some(string_of(&kept))
        },
        None => None,
    }
}

/// Extract the page title from <title> or <h1>
pub fn extract_title(document: &::scraper::Html) -> (title: Option<String>)
    ensures
        crate::config::text_of(title) == title_of(*document),
{
    match heading(&select_texts(document, "title")) {
        Some(title) => Some(title),
        None => heading(&select_texts(document, "h1")),
    }
}

/// Extract text from paragraphs and headings, excluding scripts and styles
pub fn extract_text_from_element(document: &::scraper::Html) -> (text: String)
    ensures
        text@ == text_of_page(*document),
{
    let elements = match select_texts(document, CONTENT_SELECTOR) {
        Some(elements) => elements,
        None => { return String::new(); },
    };
    let space: Vec<char> = vec![' '];
    assert(space@ =~= seq![' ']);
    let mut paragraphs: Vec<Vec<char>> = Vec::new();
    let mut i: usize = 0;
    proof {
        assert(element_texts(elements@).take(0) =~= Seq::<Seq<Seq<char>>>::empty());
        assert(char_lists(paragraphs@) =~= kept_paragraphs(element_texts(elements@).take(0)));
    }
    while i < elements.len()
        invariant
            i <= elements@.len(),
            space@ == seq![' '],
            char_lists(paragraphs@) == kept_paragraphs(element_texts(elements@).take(i as int)),
        decreases elements@.len() - i,
    {
        let text = concat_nodes(&elements[i], &space);
        let found = split_words(&text);
        let cleaned = join_chars(&found, &space);
        let as_text = string_of(&cleaned);
        proof {
            let all = element_texts(elements@);
            assert(all.take(i + 1).drop_last() =~= all.take(i as int));
            assert(all.take(i + 1).last() == texts(elements@[i as int]@));
            assert(cleaned@ == paragraph_of(texts(elements@[i as int]@)));
        }
        if as_text.as_str().as_bytes().len() > 20 {
            proof {
                assert(char_lists(paragraphs@.push(cleaned)) =~= char_lists(paragraphs@).push(
                    cleaned@,
                ));
            }
            paragraphs.push(cleaned);
        }
        i = i + 1;
    }
    proof {
        assert(element_texts(elements@).take(elements@.len() as int) =~= element_texts(elements@));
    }
    let gap: Vec<char> = vec!['\n', '\n'];
    assert(gap@ =~= seq!['\n', '\n']);
    string_of(&join_chars(&paragraphs, &gap))
}

fn extract_main(document: &::scraper::Html, selector: &str) -> (text: Option<String>)
    ensures
        crate::config::text_of(text) == main_text(*document, selector@),
{
    match select_first_html(document, selector) {
        Some(html) => {
            let text = extract_text_from_element(&parse_fragment(html.as_str()));
            let chars = chars_of(text.as_str());
            let (start, end) = trim_bounds(&chars);
            if start == end {
                None
            } else {
                Some(text)
            }
        },
        None => None,
    }
}

/// Extract readable text content from the page
pub fn extract_text(document: &::scraper::Html) -> (text: String)
    ensures
        text@ == content_of_page(*document),
{
    if let Some(text) = extract_main(document, "article") {
        return text;
    }
    if let Some(text) = extract_main(document, "main") {
        return text;
    }
    if let Some(text) = extract_main(document, "[role='main']") {
        return text;
    }
    if let Some(text) = extract_main(document, ".content") {
        return text;
    }
    if let Some(text) = extract_main(document, "#content") {
        return text;
    }
    extract_text_from_element(document)
}

/// What went wrong in fetching a page.
#[derive(Debug, Clone, PartialEq, Eq)]
pub enum ScraperError {
    /// The page could not be fetched; the text says why.
    FetchError(String),
    /// The page holds no text.
    NoContent,
}

/// Extracted content from a webpage
#[derive(Debug, Clone, PartialEq, Eq)]
pub struct WebContent {
    /// The URL of the page
    pub url: String,
    /// Page title
    pub title: Option<String>,
    /// Main text content
    pub text: String,
}

impl WebContent {
    /// The content of a page, which must hold more than white space.
    pub fn from_page(url: String, title: Option<String>, text: String) -> (r: Result<
        Self,
        ScraperError,
    >)
        ensures
            match r {
                Ok(content) => !is_blank(text@) && content.url == url && content.title == title
                    && content.text == text,
                Err(e) => is_blank(text@) && e is NoContent,
            },
    {
        let chars = chars_of(text.as_str());
        let (start, end) = trim_bounds(&chars);
        if start == end {
            return Err(ScraperError::NoContent);
        }
        Ok(WebContent { url, title, text })
    }
}

/// What a page gives once it has been fetched: its title and its text,
/// or no content where the text is blank.
pub fn content_of(url: &str, html: &str) -> (r: Result<WebContent, ScraperError>)
    ensures
        match r {
            Ok(content) => {
                &&& content.url@ == url@
                &&& crate::config::text_of(content.title) == title_of(document_of(html@))
                &&& content.text@ == content_of_page(document_of(html@))
                &&& !is_blank(content.text@)
            },
            Err(e) => e is NoContent && is_blank(content_of_page(document_of(html@))),
        },
{
    let document = parse_document(html);
    let title = extract_title(&document);
    let text = extract_text(&document);
    WebContent::from_page(url.to_owned(), title, text)
}

} // verus!
