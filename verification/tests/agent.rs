use summa::agent::{build_prompt, parse_gemini_model, strip_markdown_json, GeminiChoice};
use summa::scraper::{ScraperError, WebContent};
use summa::text::{chars_of, find_last, is_whitespace, starts_with, trim_text};

#[test]
fn plain_json_is_only_trimmed() {
    assert_eq!(strip_markdown_json("  {\"a\": 1}\n"), "{\"a\": 1}");
    assert_eq!(strip_markdown_json(""), "");
    assert_eq!(strip_markdown_json(" \t\n"), "");
}

#[test]
fn json_fence_is_removed() {
    assert_eq!(strip_markdown_json("```json\n{\"a\": 1}\n```"), "{\"a\": 1}");
    assert_eq!(strip_markdown_json("\n ```json {\"a\": 1} ``` \n"), "{\"a\": 1}");
}

#[test]
fn bare_fence_is_removed() {
    assert_eq!(strip_markdown_json("```\n{\"ä\": 1}\n```"), "{\"ä\": 1}");
    assert_eq!(strip_markdown_json("```x```trailing"), "x");
}

#[test]
fn the_last_fence_closes_the_block() {
    assert_eq!(strip_markdown_json("```json a ``` b ``` c"), "a ``` b");
    assert_eq!(strip_markdown_json("``````"), "");
    assert_eq!(strip_markdown_json("````"), "````");
}

#[test]
fn unclosed_fence_is_kept() {
    assert_eq!(strip_markdown_json(" ```json {\"a\": 1} "), "```json {\"a\": 1}");
    assert_eq!(strip_markdown_json("```"), "```");
    assert_eq!(strip_markdown_json("```json"), "```json");
}

#[test]
fn model_names_are_parsed() {
    assert_eq!(parse_gemini_model("gemini-2.0-flash"), GeminiChoice::Gemini20Flash);
    assert_eq!(parse_gemini_model("gemini-2.5-flash"), GeminiChoice::Gemini25Flash);
    assert_eq!(parse_gemini_model("gemini-2.5-pro"), GeminiChoice::Gemini25Pro);
    assert_eq!(parse_gemini_model("something else"), GeminiChoice::Gemini20Flash);
    assert_eq!(parse_gemini_model(""), GeminiChoice::Gemini20Flash);
}

#[test]
fn prompt_holds_persona_instructions_format_and_text() {
    let prompt = build_prompt("PERSONA", "DO THIS", "THE TEXT");
    assert!(prompt.starts_with("PERSONA\n\nDO THIS\n\nYou MUST respond with valid JSON"));
    assert!(prompt.ends_with("Only output the raw JSON object.\n\n---\n\nTHE TEXT"));
    assert!(prompt.contains("\"action_items\": [\"array of actionable items or next steps, can be empty\"]\n}\n"));
}

#[test]
fn whitespace_is_what_the_standard_library_calls_whitespace() {
    for n in 0..=0x10ffffu32 {
        if let Some(c) = char::from_u32(n) {
            assert_eq!(is_whitespace(c), c.is_whitespace(), "U+{n:04X}");
        }
    }
}

#[test]
fn trimming_agrees_with_the_standard_library() {
    for s in ["", " ", "a", " a", "a ", "\t a b \n", "\u{3000}x\u{a0}", "  \u{2003} ", "é é"] {
        assert_eq!(trim_text(s), s.trim(), "{s:?}");
    }
}

#[test]
fn find_last_agrees_with_the_standard_library() {
    for (hay, needle) in [("abcabc", "bc"), ("abc", "d"), ("", ""), ("aaa", "aa"), ("a", "ab"), ("xyz", "")] {
        let found = find_last(&chars_of(hay), &chars_of(needle));
        assert_eq!(found, hay.rfind(needle), "{hay:?} {needle:?}");
        assert_eq!(starts_with(&chars_of(hay), &chars_of(needle)), hay.starts_with(needle));
    }
}

#[test]
fn page_without_text_has_no_content() {
    assert_eq!(
        WebContent::from_page("https://a".to_string(), None, " \n\t ".to_string()),
        Err(ScraperError::NoContent)
    );
    assert_eq!(
        WebContent::from_page("https://a".to_string(), None, String::new()),
        Err(ScraperError::NoContent)
    );
    let page = WebContent::from_page(
        "https://a".to_string(),
        Some("T".to_string()),
        " body ".to_string(),
    )
    .unwrap();
    assert_eq!(page.url, "https://a");
    assert_eq!(page.title.as_deref(), Some("T"));
    assert_eq!(page.text, " body ");
}
